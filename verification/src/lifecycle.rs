use vstd::prelude::*;
use vstd::string::*;
use crate::descriptor::NodeDescriptor;
use crate::num::{dec_rep, u64_to_dec};
use crate::text::{find_stop, lemma_stop_unique, match_at, matches_at, stop_at};

verus! {

/// `i` is where the staging member starts: the first position in the body
/// at which the member text `"staging":"` occurs.
pub open spec fn staging_key_at(s: Seq<char>, i: int) -> bool {
    &&& matches_at(s, i, "\"staging\":\""@)
    &&& forall|j: int| 0 <= j < i ==> !matches_at(s, j, "\"staging\":\""@)
}

/// The staging member occupies `[i, e]`: its key text starts at `i` (the
/// first occurrence) and its string value closes at `e` without escape
/// sequences.
pub open spec fn staging_member_at(s: Seq<char>, i: int, e: int) -> bool {
    staging_key_at(s, i) && stop_at(s, i + 11, e)
}

/// The body carries a staging string member. Members before and after it
/// are arbitrary — the about body is only required to contain the staging
/// member, not to consist of it.
pub open spec fn has_staging(s: Seq<char>) -> bool {
    exists|i: int, e: int| staging_member_at(s, i, e)
}

/// `sp` is the value of the body's staging member.
pub open spec fn is_staging_value(s: Seq<char>, sp: Seq<char>) -> bool {
    exists|i: int, e: int| staging_member_at(s, i, e) && sp == s.subrange(i + 11, e)
}

/// The staging path the body carries.
pub open spec fn staging_value(s: Seq<char>) -> Seq<char> {
    choose|sp: Seq<char>| is_staging_value(s, sp)
}

/// The staging member is read off one way only: its key position is the
/// first occurrence and its value ends at the first clean quote.
proof fn lemma_staging_member_unique(s: Seq<char>, i1: int, e1: int, i2: int, e2: int)
    requires
        staging_member_at(s, i1, e1),
        staging_member_at(s, i2, e2),
    ensures
        i1 == i2,
        e1 == e2,
{
    if i1 < i2 {
        assert(!matches_at(s, i1, "\"staging\":\""@));
    }
    if i2 < i1 {
        assert(!matches_at(s, i2, "\"staging\":\""@));
    }
    lemma_stop_unique(s, i1 + 11, e1, e2);
}

/// Find the first occurrence of the staging member text.
fn find_staging_key(s: &str) -> (r: Option<usize>)
    ensures
        match r {
            Some(i) => staging_key_at(s@, i as int),
            None => forall|i: int| !matches_at(s@, i, "\"staging\":\""@),
        },
{
    let n = s.unicode_len();
    let mut i: usize = 0;
    while i < n
        invariant
            i <= n,
            n == s@.len(),
            forall|j: int| 0 <= j < i ==> !matches_at(s@, j, "\"staging\":\""@),
        decreases n - i,
    {
        if match_at(s, i, "\"staging\":\"") {
            return Some(i);
        }
        i += 1;
    }
    proof {
        assert forall|j: int| !matches_at(s@, j, "\"staging\":\""@) by {
            if 0 <= j < n {
                assert(!matches_at(s@, j, "\"staging\":\""@));
            } else if j >= n {
                reveal_strlit("\"staging\":\"");
                assert(j + "\"staging\":\""@.len() > s@.len());
            }
        }
    }
    None
}

/// Pull the staging path out of an about-response body: the value of the
/// body's staging string member. A body without such a member — the key
/// missing, or its value not a string — yields `None`, a fatal parse
/// error for the caller.
pub fn parse_staging(s: &str) -> (r: Option<String>)
    ensures
        match r {
            Some(sp) => has_staging(s@) && sp@ == staging_value(s@),
            None => !has_staging(s@),
        },
{
    proof {
        reveal_strlit("\"staging\":\"");
        assert("\"staging\":\""@.len() == 11);
    }
    let _n: usize = s.unicode_len();
    let i = match find_staging_key(s) {
        Some(i) => i,
        None => {
            proof {
                assert(!has_staging(s@)) by {
                    if has_staging(s@) {
                        let (ii, ee) = choose|ii: int, ee: int| staging_member_at(s@, ii, ee);
                        assert(matches_at(s@, ii, "\"staging\":\""@));
                    }
                }
            }
            return None;
        },
    };
    let p = i + "\"staging\":\"".unicode_len();
    let e = match find_stop(s, p) {
        Some(e) => e,
        None => {
            proof {
                assert(!has_staging(s@)) by {
                    if has_staging(s@) {
                        let (ii, ee) = choose|ii: int, ee: int| staging_member_at(s@, ii, ee);
                        if ii < i {
                            assert(!matches_at(s@, ii, "\"staging\":\""@));
                        }
                        if i < ii {
                            assert(!matches_at(s@, i as int, "\"staging\":\""@));
                        }
                        assert(stop_at(s@, p as int, ee));
                    }
                }
            }
            return None;
        },
    };
    proof {
        let sp = s@.subrange(p as int, e as int);
        assert(staging_member_at(s@, i as int, e as int));
        assert(has_staging(s@));
        assert(is_staging_value(s@, sp));
        assert(staging_value(s@) == sp) by {
            let other = staging_value(s@);
            assert(is_staging_value(s@, other));
            let (ii, ee) = choose|ii: int, ee: int|
                staging_member_at(s@, ii, ee) && other == s@.subrange(ii + 11, ee);
            lemma_staging_member_unique(s@, i as int, e as int, ii, ee);
        }
    }
    Some(s.substring_char(p, e).to_owned())
}

/// One row of the cluster-info report, assembled fresh per call.
pub struct ClusterInfoEntry {
    pub domain_name: String,
    pub reachable: bool,
    pub staging_path: String,
    pub storage_endpoint: String,
    pub error: Option<String>,
    pub status_code: Option<String>,
}

/// What the driver observed when it asked one node's about endpoint.
pub enum AboutProbe {
    /// The endpoint answered: its status line and raw body.
    Reached { status: String, body: String },
    /// The transport failed: the error text and any status that came with it.
    Unreachable { error: String, status: Option<String> },
}

/// The one fatal error of cluster info: a node answered, but without a
/// staging string member in its about body.
#[derive(Debug)]
pub enum ClusterInfoError {
    AboutParse,
}

pub open spec fn entry_matches(
    e: ClusterInfoEntry,
    node: NodeDescriptor,
    probe: AboutProbe,
    endpoint: Seq<char>,
) -> bool {
    match probe {
        AboutProbe::Reached { status, body } => {
            &&& has_staging(body@)
            &&& e.reachable
            &&& e.domain_name@ == node@.domain_name
            &&& e.staging_path@ == staging_value(body@)
            &&& e.storage_endpoint@ == endpoint
            &&& e.error is None
            &&& e.status_code matches Some(sc) && sc@ == status@
        },
        AboutProbe::Unreachable { error, status } => {
            &&& !e.reachable
            &&& e.domain_name@ == node@.domain_name
            &&& e.staging_path@.len() == 0
            &&& e.storage_endpoint@ == endpoint
            &&& e.error matches Some(er) && er@ == error@
            &&& match status {
                Some(sc) => e.status_code matches Some(x) && x@ == sc@,
                None => e.status_code is None,
            }
        },
    }
}

/// Assemble the cluster-info report: one entry per node, always. A node
/// that answered contributes the staging path from its about body; one
/// that did not is marked unreachable with the error text. A reachable
/// node whose about body carries no staging string member fails the whole
/// call — that member of the response is assumed contractually fixed.
pub fn build_cluster_info(
    nodes: &Vec<NodeDescriptor>,
    probes: &Vec<AboutProbe>,
    storage_endpoint: &String,
) -> (r: Result<Vec<ClusterInfoEntry>, ClusterInfoError>)
    requires
        nodes@.len() == probes@.len(),
    ensures
        match r {
            Ok(entries) => {
                &&& entries@.len() == nodes@.len()
                &&& forall|i: int|
                    0 <= i < nodes@.len() ==> entry_matches(
                        #[trigger] entries@[i],
                        nodes@[i],
                        probes@[i],
                        storage_endpoint@,
                    )
            },
            Err(_) => exists|i: int|
                #![trigger probes@[i]]
                {
                    &&& 0 <= i < probes@.len()
                    &&& probes@[i] matches AboutProbe::Reached { body, .. }
                    &&& !has_staging(body@)
                },
        },
{
    let mut out: Vec<ClusterInfoEntry> = Vec::new();
    let mut i: usize = 0;
    while i < nodes.len()
        invariant
            i <= nodes@.len(),
            nodes@.len() == probes@.len(),
            out@.len() == i,
            forall|j: int|
                0 <= j < i ==> entry_matches(
                    #[trigger] out@[j],
                    nodes@[j],
                    probes@[j],
                    storage_endpoint@,
                ),
        decreases nodes@.len() - i,
    {
        match &probes[i] {
            AboutProbe::Reached { status, body } => {
                match parse_staging(body.as_str()) {
                    Some(sp) => {
                        out.push(
                            ClusterInfoEntry {
                                domain_name: nodes[i].domain_name.clone(),
                                reachable: true,
                                staging_path: sp,
                                storage_endpoint: storage_endpoint.clone(),
                                error: None,
                                status_code: Some(status.clone()),
                            },
                        );
                    },
                    None => {
                        return Err(ClusterInfoError::AboutParse);
                    },
                }
            },
            AboutProbe::Unreachable { error, status } => {
                let sc = match status {
                    Some(x) => Some(x.clone()),
                    None => None,
                };
                out.push(
                    ClusterInfoEntry {
                        domain_name: nodes[i].domain_name.clone(),
                        reachable: false,
                        staging_path: String::new(),
                        storage_endpoint: storage_endpoint.clone(),
                        error: Some(error.clone()),
                        status_code: sc,
                    },
                );
            },
        }
        i += 1;
    }
    Ok(out)
}

/// Whether the address text parses as a URL with a host and an explicit
/// port; decided by the text alone.
pub uninterp spec fn url_hp_ok(s: Seq<char>) -> bool;

/// The host of such an address.
pub uninterp spec fn url_host_of(s: Seq<char>) -> Seq<char>;

/// The explicit port of such an address.
pub uninterp spec fn url_port_of(s: Seq<char>) -> u16;

/// Relies on url::Url::parse, Url::host_str and Url::port: all three are
/// functions of the address text alone — parse takes no base and reads no
/// environment, and the other two read the parsed record. None of them
/// panics; absence of host or explicit port comes back as `None`.
#[verifier::external_body]
fn url_host_port(s: &str) -> (r: Option<(String, u16)>)
    ensures
        r is Some <==> url_hp_ok(s@),
        r matches Some((h, p)) ==> h@ == url_host_of(s@) && p == url_port_of(s@),
{
    let u = url::Url::parse(s).ok()?;
    let h = u.host_str()?.to_owned();
    let p = u.port()?;
    Some((h, p))
}

/// The canonical storage key of the metadata blob for the node at
/// `host:port`.
pub open spec fn meta_key(host: Seq<char>, port: nat) -> Seq<char> {
    "ingester."@ + host + "."@ + dec_rep(port) + ".json"@
}

/// Spell the canonical metadata key of the node at `host` with `port`.
pub fn meta_key_of(host: &String, port: u16) -> (r: String)
    ensures
        r@ == meta_key(host@, port as nat),
{
    let mut k = String::from_str("ingester.");
    k.append(host.as_str());
    k.append(".");
    k.append(u64_to_dec(port as u64).as_str());
    k.append(".json");
    proof {
        assert(k@ =~= meta_key(host@, port as nat));
    }
    k
}

/// Derive the metadata key for the node at `domain`: parse the address and
/// spell the key from its host and explicit port. An address without both
/// yields nothing.
pub fn node_meta_key(domain: &String) -> (r: Option<String>)
    ensures
        r is Some <==> url_hp_ok(domain@),
        r matches Some(k) ==> k@ == meta_key(
            url_host_of(domain@),
            url_port_of(domain@) as nat,
        ),
{
    let (h, p) = match url_host_port(domain.as_str()) {
        Some(hp) => hp,
        None => {
            return None;
        },
    };
    Some(meta_key_of(&h, p))
}

/// Why a removal was refused before storage was touched.
#[derive(Debug)]
pub enum RemoveError {
    /// The node still answers its liveness probe: removing a live node is
    /// refused as a failed precondition.
    NodeOnline,
    /// The node's advertised address has no parseable host and port, so no
    /// metadata key can be derived for it.
    BadAddress,
}

/// What storage reported for the delete of the metadata blob.
pub enum DeleteOutcome {
    /// The blob was deleted.
    Deleted,
    /// The blob was already gone: removal is idempotent, this is success.
    NotFound,
    /// Storage failed in some other way.
    StoreError,
}

/// Decide a removal request: a node that still answers its liveness probe
/// is refused; a confirmed-offline node with a parseable address yields
/// the storage key of exactly its metadata blob.
pub fn plan_remove(domain: &String, live: bool) -> (r: Result<String, RemoveError>)
    ensures
        live <==> r matches Err(RemoveError::NodeOnline),
        !live && url_hp_ok(domain@) ==> (r matches Ok(k) && k@ == meta_key(
            url_host_of(domain@),
            url_port_of(domain@) as nat,
        )),
        !live && !url_hp_ok(domain@) ==> r matches Err(RemoveError::BadAddress),
{
    if live {
        return Err(RemoveError::NodeOnline);
    }
    match node_meta_key(domain) {
        Some(k) => Ok(k),
        None => Err(RemoveError::BadAddress),
    }
}

/// Settle a removal after the storage delete: a deleted blob and the
/// idempotent no-op on an already-absent blob both report success, each
/// under its fixed confirmation line; any other storage failure surfaces
/// as a removal error.
pub fn remove_message(domain: &String, outcome: &DeleteOutcome) -> (r: Result<String, String>)
    ensures
        match outcome {
            DeleteOutcome::Deleted => r matches Ok(m) && m@ == "Node "@ + domain@
                + " Removed Successfully"@,
            DeleteOutcome::NotFound => r matches Ok(m) && m@ == "Node "@ + domain@
                + " Not Found"@,
            DeleteOutcome::StoreError => r matches Err(m) && m@ == "Error Removing Node "@
                + domain@,
        },
{
    match outcome {
        DeleteOutcome::Deleted => {
            let mut m = String::from_str("Node ");
            m.append(domain.as_str());
            m.append(" Removed Successfully");
            Ok(m)
        },
        DeleteOutcome::NotFound => {
            let mut m = String::from_str("Node ");
            m.append(domain.as_str());
            m.append(" Not Found");
            Ok(m)
        },
        DeleteOutcome::StoreError => {
            let mut m = String::from_str("Error Removing Node ");
            m.append(domain.as_str());
            Err(m)
        },
    }
}

} // verus!
