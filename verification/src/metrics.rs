use vstd::prelude::*;
use crate::descriptor::{NodeDescriptor, NodeDescriptorView};

verus! {

#[verifier::external_type_specification]
#[verifier::external_body]
pub struct ExScrape(prometheus_parse::Scrape);

/// Relies on prometheus_parse::Scrape::parse: its only failure is an
/// error handed back by the line iterator, and the iterator built here
/// never yields one, so a scrape always comes back — lines the parser
/// does not understand are dropped, not errors. Nothing is said of the
/// scrape's contents (its sample timestamps depend on the clock).
#[verifier::external_body]
fn parse_exposition(text: &str) -> (r: Option<prometheus_parse::Scrape>)
    ensures
        r is Some,
{
    let lines = text.lines().map(|l| Ok::<String, std::io::Error>(l.to_owned()));
    prometheus_parse::Scrape::parse(lines).ok()
}

/// The parsed samples of one reachable node, tagged with the node they
/// came from.
pub struct MetricsSampleSet {
    pub domain_name: String,
    pub samples: prometheus_parse::Scrape,
}

/// The domain names that end up in the collected metrics, in listing
/// order: one entry per node whose metrics endpoint answered;
/// unreachable nodes are silently omitted.
pub open spec fn kept_domains(
    nodes: Seq<NodeDescriptorView>,
    bodies: Seq<Option<Seq<char>>>,
) -> Seq<Seq<char>>
    decreases nodes.len(),
{
    if nodes.len() == 0 {
        Seq::empty()
    } else {
        let rest = kept_domains(nodes.drop_last(), bodies.drop_last());
        match bodies.last() {
            Some(_) => rest.push(nodes.last().domain_name),
            None => rest,
        }
    }
}

/// The collection never invents entries: at most one sample set per node,
/// so the result is never longer than the node list.
pub proof fn lemma_metrics_within_node_count(
    nodes: Seq<NodeDescriptorView>,
    bodies: Seq<Option<Seq<char>>>,
)
    requires
        nodes.len() == bodies.len(),
    ensures
        kept_domains(nodes, bodies).len() <= nodes.len(),
    decreases nodes.len(),
{
    if nodes.len() > 0 {
        lemma_metrics_within_node_count(nodes.drop_last(), bodies.drop_last());
    }
}

/// Turn per-node metrics fetches into one sample set per node that
/// answered: `bodies[i]` is the exposition text node `i` returned, `None`
/// where the fetch failed. No placeholder is inserted for missing nodes,
/// so the result may be shorter than the node list.
pub fn collect_cluster_metrics(nodes: &Vec<NodeDescriptor>, bodies: &Vec<Option<String>>) -> (r:
    Vec<MetricsSampleSet>)
    requires
        nodes@.len() == bodies@.len(),
    ensures
        r@.map_values(|m: MetricsSampleSet| m.domain_name@) == kept_domains(
            nodes@.map_values(|n: NodeDescriptor| n@),
            bodies@.map_values(
                |b: Option<String>|
                    match b {
                        Some(t) => Some(t@),
                        None => None,
                    },
            ),
        ),
{
    let ghost ns = nodes@.map_values(|n: NodeDescriptor| n@);
    let ghost bs = bodies@.map_values(
        |b: Option<String>|
            match b {
                Some(t) => Some(t@),
                None => None,
            },
    );
    let mut out: Vec<MetricsSampleSet> = Vec::new();
    let mut i: usize = 0;
    while i < nodes.len()
        invariant
            i <= nodes@.len(),
            nodes@.len() == bodies@.len(),
            ns == nodes@.map_values(|n: NodeDescriptor| n@),
            bs == bodies@.map_values(
                |b: Option<String>|
                    match b {
                        Some(t) => Some(t@),
                        None => None,
                    },
            ),
            out@.map_values(|m: MetricsSampleSet| m.domain_name@) == kept_domains(
                ns.take(i as int),
                bs.take(i as int),
            ),
        decreases nodes@.len() - i,
    {
        let ghost prev = out@.map_values(|m: MetricsSampleSet| m.domain_name@);
        match &bodies[i] {
            Some(text) => {
                match parse_exposition(text.as_str()) {
                    Some(scrape) => {
                        out.push(
                            MetricsSampleSet {
                                domain_name: nodes[i].domain_name.clone(),
                                samples: scrape,
                            },
                        );
                        proof {
                            assert(out@.map_values(|m: MetricsSampleSet| m.domain_name@)
                                =~= prev.push(out@.last().domain_name@));
                        }
                    },
                    None => {},
                }
            },
            None => {},
        }
        proof {
            assert(ns.take(i + 1).drop_last() =~= ns.take(i as int));
            assert(bs.take(i + 1).drop_last() =~= bs.take(i as int));
            assert(ns.take(i + 1).last() == nodes@[i as int]@);
        }
        i += 1;
    }
    proof {
        assert(ns.take(nodes@.len() as int) =~= ns);
        assert(bs.take(bodies@.len() as int) =~= bs);
    }
    out
}

} // verus!
