use vstd::prelude::*;
use vstd::string::*;
use crate::text::{find_stop, lemma_stop_unique, match_at, matches_at, stop_at};

verus! {

/// A single ingestion node as the coordinator sees it: its advertised
/// address, the credential to present when calling it, and its role.
pub struct NodeDescriptor {
    pub domain_name: String,
    pub token: String,
    pub node_type: String,
}

pub struct NodeDescriptorView {
    pub domain_name: Seq<char>,
    pub token: Seq<char>,
    pub node_type: Seq<char>,
}

impl View for NodeDescriptor {
    type V = NodeDescriptorView;

    open spec fn view(&self) -> NodeDescriptorView {
        NodeDescriptorView {
            domain_name: self.domain_name@,
            token: self.token@,
            node_type: self.node_type@,
        }
    }
}

/// A field can be written into a blob verbatim: it contains no quote and no
/// backslash, so the encoding needs no escape sequences.
pub open spec fn field_ok(s: Seq<char>) -> bool {
    forall|i: int| 0 <= i < s.len() ==> s[i] != '"' && s[i] != '\\'
}

impl NodeDescriptorView {
    pub open spec fn wf(self) -> bool {
        field_ok(self.domain_name) && field_ok(self.token) && field_ok(self.node_type)
    }
}

impl NodeDescriptor {
    pub open spec fn wf(self) -> bool {
        self@.wf()
    }

    pub fn new(domain_name: String, token: String, node_type: String) -> (r: NodeDescriptor)
        ensures
            r@ == (NodeDescriptorView { domain_name: domain_name@, token: token@, node_type: node_type@ }),
    {
        NodeDescriptor { domain_name, token, node_type }
    }
}

/// The canonical blob a descriptor is stored as: one JSON object with the
/// three fields in fixed order and no escape sequences.
pub open spec fn encoding(v: NodeDescriptorView) -> Seq<char> {
    "{\"domain_name\":\""@ + v.domain_name + "\",\"token\":\""@ + v.token
        + "\",\"node_type\":\""@ + v.node_type + "\"}"@
}

/// A blob is well formed when it is the canonical encoding of some descriptor.
pub open spec fn is_encoding(s: Seq<char>) -> bool {
    exists|v: NodeDescriptorView| v.wf() && s == encoding(v)
}

/// The descriptor a well-formed blob stands for.
pub open spec fn decoded(s: Seq<char>) -> NodeDescriptorView {
    choose|v: NodeDescriptorView| v.wf() && s == encoding(v)
}

/// Where each part of a canonical encoding lies in the blob.
pub proof fn lemma_encoding_parts(v: NodeDescriptorView)
    requires
        v.wf(),
    ensures
        ({
            let s = encoding(v);
            let e1 = 16 + v.domain_name.len() as int;
            let p2 = e1 + 11;
            let e2 = p2 + v.token.len() as int;
            let p3 = e2 + 15;
            let e3 = p3 + v.node_type.len() as int;
            &&& s.len() == e3 + 2
            &&& matches_at(s, 0, "{\"domain_name\":\""@)
            &&& stop_at(s, 16, e1)
            &&& v.domain_name == s.subrange(16, e1)
            &&& matches_at(s, e1, "\",\"token\":\""@)
            &&& stop_at(s, p2, e2)
            &&& v.token == s.subrange(p2, e2)
            &&& matches_at(s, e2, "\",\"node_type\":\""@)
            &&& stop_at(s, p3, e3)
            &&& v.node_type == s.subrange(p3, e3)
            &&& matches_at(s, e3, "\"}"@)
        }),
{
    reveal_strlit("{\"domain_name\":\"");
    reveal_strlit("\",\"token\":\"");
    reveal_strlit("\",\"node_type\":\"");
    reveal_strlit("\"}");
    let s = encoding(v);
    let e1 = 16 + v.domain_name.len() as int;
    let p2 = e1 + 11;
    let e2 = p2 + v.token.len() as int;
    let p3 = e2 + 15;
    let e3 = p3 + v.node_type.len() as int;
    assert(s.len() == e3 + 2);
    assert(s.subrange(0, 16) =~= "{\"domain_name\":\""@);
    assert(v.domain_name =~= s.subrange(16, e1));
    assert(s.subrange(e1, p2) =~= "\",\"token\":\""@);
    assert(v.token =~= s.subrange(p2, e2));
    assert(s.subrange(e2, p3) =~= "\",\"node_type\":\""@);
    assert(v.node_type =~= s.subrange(p3, e3));
    assert(s.subrange(e3, e3 + 2) =~= "\"}"@);
    assert(s[e1] == '"');
    assert forall|j: int| 16 <= j < e1 implies s[j] != '"' && s[j] != '\\' by {
        assert(s[j] == v.domain_name[j - 16]);
    }
    assert(s[e2] == '"');
    assert forall|j: int| p2 <= j < e2 implies s[j] != '"' && s[j] != '\\' by {
        assert(s[j] == v.token[j - p2]);
    }
    assert(s[e3] == '"');
    assert forall|j: int| p3 <= j < e3 implies s[j] != '"' && s[j] != '\\' by {
        assert(s[j] == v.node_type[j - p3]);
    }
}

/// No two well-formed descriptors share a blob: the encoding is injective.
pub proof fn lemma_encoding_injective(a: NodeDescriptorView, b: NodeDescriptorView)
    requires
        a.wf(),
        b.wf(),
        encoding(a) == encoding(b),
    ensures
        a == b,
{
    let s = encoding(a);
    lemma_encoding_parts(a);
    lemma_encoding_parts(b);
    let ea = 16 + a.domain_name.len() as int;
    let eb = 16 + b.domain_name.len() as int;
    lemma_stop_unique(s, 16, ea, eb);
    assert(a.domain_name == b.domain_name);
    let p2 = ea + 11;
    let ta = p2 + a.token.len() as int;
    let tb = p2 + b.token.len() as int;
    lemma_stop_unique(s, p2, ta, tb);
    assert(a.token == b.token);
    let p3 = ta + 15;
    assert(a.node_type.len() == b.node_type.len());
    assert(a.node_type == b.node_type);
}

/// Serialize a descriptor into its canonical storage blob. Only a
/// well-formed descriptor has one: a quote or backslash in a field would
/// come out as a blob of some other descriptor, so such fields are
/// refused here rather than mangled.
pub fn to_blob(d: &NodeDescriptor) -> (r: String)
    requires
        d.wf(),
    ensures
        r@ == encoding(d@),
{
    let mut out = String::from_str("{\"domain_name\":\"");
    out.append(d.domain_name.as_str());
    out.append("\",\"token\":\"");
    out.append(d.token.as_str());
    out.append("\",\"node_type\":\"");
    out.append(d.node_type.as_str());
    out.append("\"}");
    proof {
        assert(out@ =~= encoding(d@));
    }
    out
}

/// A blob that does not open with the domain-name key is no encoding.
proof fn lemma_malformed_prefix(s: Seq<char>)
    requires
        !matches_at(s, 0, "{\"domain_name\":\""@),
    ensures
        !is_encoding(s),
{
    assert forall|v: NodeDescriptorView| !(v.wf() && s == encoding(v)) by {
        if v.wf() && s == encoding(v) {
            lemma_encoding_parts(v);
        }
    }
}

/// A blob whose domain-name field never closes is no encoding.
proof fn lemma_malformed_stop1(s: Seq<char>)
    requires
        forall|i: int| !stop_at(s, 16, i),
    ensures
        !is_encoding(s),
{
    assert forall|v: NodeDescriptorView| !(v.wf() && s == encoding(v)) by {
        if v.wf() && s == encoding(v) {
            lemma_encoding_parts(v);
            assert(stop_at(s, 16, 16 + v.domain_name.len() as int));
        }
    }
}

/// A blob without the token key after the domain-name field is no encoding.
proof fn lemma_malformed_sep2(s: Seq<char>, e1: int)
    requires
        stop_at(s, 16, e1),
        !matches_at(s, e1, "\",\"token\":\""@),
    ensures
        !is_encoding(s),
{
    assert forall|v: NodeDescriptorView| !(v.wf() && s == encoding(v)) by {
        if v.wf() && s == encoding(v) {
            lemma_encoding_parts(v);
            lemma_stop_unique(s, 16, e1, 16 + v.domain_name.len() as int);
        }
    }
}

/// A blob whose token field never closes is no encoding.
proof fn lemma_malformed_stop2(s: Seq<char>, e1: int)
    requires
        stop_at(s, 16, e1),
        forall|i: int| !(#[trigger] stop_at(s, e1 + 11, i)),
    ensures
        !is_encoding(s),
{
    assert forall|v: NodeDescriptorView| !(v.wf() && s == encoding(v)) by {
        if v.wf() && s == encoding(v) {
            lemma_encoding_parts(v);
            lemma_stop_unique(s, 16, e1, 16 + v.domain_name.len() as int);
            assert(stop_at(s, e1 + 11, e1 + 11 + v.token.len() as int));
        }
    }
}

/// A blob without the node-type key after the token field is no encoding.
proof fn lemma_malformed_sep3(s: Seq<char>, e1: int, e2: int)
    requires
        stop_at(s, 16, e1),
        stop_at(s, e1 + 11, e2),
        !matches_at(s, e2, "\",\"node_type\":\""@),
    ensures
        !is_encoding(s),
{
    assert forall|v: NodeDescriptorView| !(v.wf() && s == encoding(v)) by {
        if v.wf() && s == encoding(v) {
            lemma_encoding_parts(v);
            lemma_stop_unique(s, 16, e1, 16 + v.domain_name.len() as int);
            lemma_stop_unique(s, e1 + 11, e2, e1 + 11 + v.token.len() as int);
        }
    }
}

/// A blob whose node-type field never closes is no encoding.
proof fn lemma_malformed_stop3(s: Seq<char>, e1: int, e2: int)
    requires
        stop_at(s, 16, e1),
        stop_at(s, e1 + 11, e2),
        forall|i: int| !(#[trigger] stop_at(s, e2 + 15, i)),
    ensures
        !is_encoding(s),
{
    assert forall|v: NodeDescriptorView| !(v.wf() && s == encoding(v)) by {
        if v.wf() && s == encoding(v) {
            lemma_encoding_parts(v);
            lemma_stop_unique(s, 16, e1, 16 + v.domain_name.len() as int);
            lemma_stop_unique(s, e1 + 11, e2, e1 + 11 + v.token.len() as int);
            assert(stop_at(s, e2 + 15, e2 + 15 + v.node_type.len() as int));
        }
    }
}

/// A blob that does not end in a closing brace right after the node-type
/// field is no encoding.
proof fn lemma_malformed_tail(s: Seq<char>, e1: int, e2: int, e3: int)
    requires
        stop_at(s, 16, e1),
        stop_at(s, e1 + 11, e2),
        stop_at(s, e2 + 15, e3),
        !(matches_at(s, e3, "\"}"@) && e3 + 2 == s.len()),
    ensures
        !is_encoding(s),
{
    assert forall|v: NodeDescriptorView| !(v.wf() && s == encoding(v)) by {
        if v.wf() && s == encoding(v) {
            lemma_encoding_parts(v);
            lemma_stop_unique(s, 16, e1, 16 + v.domain_name.len() as int);
            lemma_stop_unique(s, e1 + 11, e2, e1 + 11 + v.token.len() as int);
            lemma_stop_unique(s, e2 + 15, e3, e2 + 15 + v.node_type.len() as int);
        }
    }
}

/// A blob in which every delimiter is in place is the encoding of the
/// descriptor read off between the delimiters.
proof fn lemma_parse_success(s: Seq<char>, e1: int, e2: int, e3: int)
    requires
        matches_at(s, 0, "{\"domain_name\":\""@),
        stop_at(s, 16, e1),
        matches_at(s, e1, "\",\"token\":\""@),
        stop_at(s, e1 + 11, e2),
        matches_at(s, e2, "\",\"node_type\":\""@),
        stop_at(s, e2 + 15, e3),
        matches_at(s, e3, "\"}"@),
        e3 + 2 == s.len(),
    ensures
        ({
            let v = NodeDescriptorView {
                domain_name: s.subrange(16, e1),
                token: s.subrange(e1 + 11, e2),
                node_type: s.subrange(e2 + 15, e3),
            };
            &&& v.wf()
            &&& s == encoding(v)
            &&& is_encoding(s)
            &&& decoded(s) == v
        }),
{
    reveal_strlit("{\"domain_name\":\"");
    reveal_strlit("\",\"token\":\"");
    reveal_strlit("\",\"node_type\":\"");
    reveal_strlit("\"}");
    let v = NodeDescriptorView {
        domain_name: s.subrange(16, e1),
        token: s.subrange(e1 + 11, e2),
        node_type: s.subrange(e2 + 15, e3),
    };
    assert(s =~= encoding(v));
    assert(is_encoding(s));
    lemma_encoding_injective(v, decoded(s));
}

/// Parse a storage blob. Returns the descriptor exactly when the blob is the
/// canonical encoding of a well-formed descriptor; anything else is malformed
/// and yields `None`, never an abort.
pub fn parse_blob(s: &str) -> (r: Option<NodeDescriptor>)
    ensures
        match r {
            Some(d) => d@.wf() && s@ == encoding(d@) && is_encoding(s@) && d@ == decoded(s@),
            None => !is_encoding(s@),
        },
{
    proof {
        reveal_strlit("{\"domain_name\":\"");
        reveal_strlit("\",\"token\":\"");
        reveal_strlit("\",\"node_type\":\"");
        reveal_strlit("\"}");
        assert("{\"domain_name\":\""@.len() == 16);
        assert("\",\"token\":\""@.len() == 11);
        assert("\",\"node_type\":\""@.len() == 15);
        assert("\"}"@.len() == 2);
    }
    let n = s.unicode_len();
    if !match_at(s, 0, "{\"domain_name\":\"") {
        proof {
            lemma_malformed_prefix(s@);
        }
        return None;
    }
    let p1 = "{\"domain_name\":\"".unicode_len();
    let e1 = match find_stop(s, p1) {
        Some(i) => i,
        None => {
            proof {
                lemma_malformed_stop1(s@);
            }
            return None;
        },
    };
    if !match_at(s, e1, "\",\"token\":\"") {
        proof {
            lemma_malformed_sep2(s@, e1 as int);
        }
        return None;
    }
    let p2 = e1 + "\",\"token\":\"".unicode_len();
    let e2 = match find_stop(s, p2) {
        Some(i) => i,
        None => {
            proof {
                lemma_malformed_stop2(s@, e1 as int);
            }
            return None;
        },
    };
    if !match_at(s, e2, "\",\"node_type\":\"") {
        proof {
            lemma_malformed_sep3(s@, e1 as int, e2 as int);
        }
        return None;
    }
    let p3 = e2 + "\",\"node_type\":\"".unicode_len();
    let e3 = match find_stop(s, p3) {
        Some(i) => i,
        None => {
            proof {
                lemma_malformed_stop3(s@, e1 as int, e2 as int);
            }
            return None;
        },
    };
    if !match_at(s, e3, "\"}") {
        proof {
            lemma_malformed_tail(s@, e1 as int, e2 as int, e3 as int);
        }
        return None;
    }
    if e3 + 2 != n {
        proof {
            reveal_strlit("\"}");
            lemma_malformed_tail(s@, e1 as int, e2 as int, e3 as int);
        }
        return None;
    }
    proof {
        lemma_parse_success(s@, e1 as int, e2 as int, e3 as int);
    }
    let d = NodeDescriptor {
        domain_name: s.substring_char(p1, e1).to_owned(),
        token: s.substring_char(p2, e2).to_owned(),
        node_type: s.substring_char(p3, e3).to_owned(),
    };
    Some(d)
}

/// Storing a descriptor and reading the blob back yields the descriptor
/// again, field for field: the codec loses nothing.
pub proof fn lemma_blob_round_trip(v: NodeDescriptorView)
    requires
        v.wf(),
    ensures
        is_encoding(encoding(v)),
        decoded(encoding(v)) == v,
{
    assert(is_encoding(encoding(v)));
    lemma_encoding_injective(decoded(encoding(v)), v);
}

} // verus!

