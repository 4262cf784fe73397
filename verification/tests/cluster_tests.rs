use cluster_core::descriptor::NodeDescriptor;
use cluster_core::lifecycle::{
    build_cluster_info, node_meta_key, parse_staging, plan_remove, remove_message, AboutProbe,
    DeleteOutcome, RemoveError,
};
use cluster_core::metrics::collect_cluster_metrics;

fn node(domain: &str) -> NodeDescriptor {
    NodeDescriptor::new(domain.to_owned(), "token".to_owned(), "ingester".to_owned())
}

const EXPOSITION: &str = "# HELP parseable_events_ingested total events\n\
# TYPE parseable_events_ingested counter\n\
parseable_events_ingested 42\n\
# TYPE process_resident_memory_bytes gauge\n\
process_resident_memory_bytes 7340032\n";

#[test]
fn metrics_collects_only_reachable_nodes() {
    let nodes = vec![node("http://a:1/"), node("http://b:2/"), node("http://c:3/")];
    let bodies: Vec<Option<String>> = vec![
        Some(EXPOSITION.to_owned()),
        None,
        Some(EXPOSITION.to_owned()),
    ];
    let sets = collect_cluster_metrics(&nodes, &bodies);
    assert_eq!(sets.len(), 2);
    assert_eq!(sets[0].domain_name, "http://a:1/");
    assert_eq!(sets[1].domain_name, "http://c:3/");
    // the exposition text really went through the parser
    assert_eq!(sets[0].samples.samples.len(), 2);
    assert_eq!(sets[0].samples.samples[0].metric, "parseable_events_ingested");
}

#[test]
fn metrics_of_no_nodes_is_empty() {
    let sets = collect_cluster_metrics(&Vec::new(), &Vec::new());
    assert!(sets.is_empty());
}

#[test]
fn staging_path_parses_from_about_body() {
    let sp = parse_staging("{\"staging\":\"/var/lib/parseable/staging\"}").unwrap();
    assert_eq!(sp, "/var/lib/parseable/staging");
    // extra members around the staging member are fine
    let sp = parse_staging(
        "{\"version\":\"v1.3.0\",\"staging\":\"/data/staging\",\"commit\":\"abcdef\"}",
    )
    .unwrap();
    assert_eq!(sp, "/data/staging");
    // no staging member, or one whose value is not a string: fatal
    assert!(parse_staging("{\"other\":\"x\"}").is_none());
    assert!(parse_staging("{\"staging\":12}").is_none());
}

#[test]
fn cluster_info_reports_every_node() {
    let nodes = vec![node("http://a:1/"), node("http://b:2/")];
    let probes = vec![
        AboutProbe::Reached {
            status: "200 OK".to_owned(),
            body: "{\"version\":\"v1.3.0\",\"staging\":\"/data/staging\",\"license\":\"agpl\"}"
                .to_owned(),
        },
        AboutProbe::Unreachable {
            error: "connection refused".to_owned(),
            status: None,
        },
    ];
    let endpoint = "http://minio:9000".to_owned();
    let infos = build_cluster_info(&nodes, &probes, &endpoint).unwrap();
    assert_eq!(infos.len(), 2);
    assert!(infos[0].reachable);
    assert_eq!(infos[0].domain_name, "http://a:1/");
    assert_eq!(infos[0].staging_path, "/data/staging");
    assert_eq!(infos[0].storage_endpoint, "http://minio:9000");
    assert_eq!(infos[0].status_code.as_deref(), Some("200 OK"));
    assert!(infos[0].error.is_none());
    assert!(!infos[1].reachable);
    assert_eq!(infos[1].staging_path, "");
    assert_eq!(infos[1].error.as_deref(), Some("connection refused"));
    assert!(infos[1].status_code.is_none());
}

#[test]
fn cluster_info_fails_whole_call_on_bad_about_body() {
    let nodes = vec![node("http://a:1/")];
    let probes = vec![AboutProbe::Reached {
        status: "200 OK".to_owned(),
        body: "{\"unexpected\":true}".to_owned(),
    }];
    let endpoint = "http://minio:9000".to_owned();
    assert!(build_cluster_info(&nodes, &probes, &endpoint).is_err());
}

#[test]
fn meta_key_spells_host_and_port() {
    let key = node_meta_key(&"http://10.0.0.7:8000/".to_owned()).unwrap();
    assert_eq!(key, "ingester.10.0.0.7.8000.json");
    // no explicit port: no key can be derived
    assert!(node_meta_key(&"http://example.com/".to_owned()).is_none());
    assert!(node_meta_key(&"not a url".to_owned()).is_none());
}

#[test]
fn removal_refuses_a_live_node() {
    let r = plan_remove(&"http://10.0.0.7:8000/".to_owned(), true);
    assert!(matches!(r, Err(RemoveError::NodeOnline)));
}

#[test]
fn removal_of_offline_node_yields_its_key() {
    let r = plan_remove(&"http://10.0.0.7:8000/".to_owned(), false);
    assert_eq!(r.unwrap(), "ingester.10.0.0.7.8000.json");
    let bad = plan_remove(&"nonsense".to_owned(), false);
    assert!(matches!(bad, Err(RemoveError::BadAddress)));
}

#[test]
fn removal_settles_each_delete_outcome() {
    let d = "http://10.0.0.7:8000/".to_owned();
    assert_eq!(
        remove_message(&d, &DeleteOutcome::Deleted).unwrap(),
        "Node http://10.0.0.7:8000/ Removed Successfully"
    );
    // a blob already gone is an idempotent success, not an error
    assert_eq!(
        remove_message(&d, &DeleteOutcome::NotFound).unwrap(),
        "Node http://10.0.0.7:8000/ Not Found"
    );
    // any other storage failure surfaces as a removal failure
    assert_eq!(
        remove_message(&d, &DeleteOutcome::StoreError).unwrap_err(),
        "Error Removing Node http://10.0.0.7:8000/"
    );
}
