use cluster_core::descriptor::{parse_blob, to_blob, NodeDescriptor};
use cluster_core::registry::list_nodes;
use cluster_core::stats::{aggregate_stats, format_bytes, parse_stats_blob, to_stats_blob, PerNodeStats};

fn descriptor(domain: &str, token: &str, node_type: &str) -> NodeDescriptor {
    NodeDescriptor::new(domain.to_owned(), token.to_owned(), node_type.to_owned())
}

#[test]
fn descriptor_round_trip_is_field_for_field() {
    let d = descriptor("http://10.0.0.7:8000/", "Basic YWRtaW46YWRtaW4=", "ingester");
    let blob = to_blob(&d);
    assert_eq!(
        blob,
        "{\"domain_name\":\"http://10.0.0.7:8000/\",\"token\":\"Basic YWRtaW46YWRtaW4=\",\"node_type\":\"ingester\"}"
    );
    let back = parse_blob(blob.as_str()).expect("canonical blob must parse");
    assert_eq!(back.domain_name, d.domain_name);
    assert_eq!(back.token, d.token);
    assert_eq!(back.node_type, d.node_type);
}

#[test]
fn descriptor_blob_rejects_noncanonical_forms() {
    assert!(parse_blob("").is_none());
    assert!(parse_blob("{}").is_none());
    assert!(parse_blob("{\"domain_name\":\"a\"}").is_none());
    // an escape sequence marks the blob as malformed
    assert!(parse_blob("{\"domain_name\":\"a\\\"b\",\"token\":\"t\",\"node_type\":\"n\"}").is_none());
    // trailing garbage
    assert!(parse_blob("{\"domain_name\":\"a\",\"token\":\"t\",\"node_type\":\"n\"}x").is_none());
}

#[test]
fn listing_skips_malformed_blobs() {
    let d1 = descriptor("http://a:1/", "t1", "ingester");
    let d2 = descriptor("http://b:2/", "t2", "ingester");
    let blobs: Vec<String> = vec![
        to_blob(&d1),
        "not json at all".to_owned(),
        "{\"domain_name\":\"broken".to_owned(),
        to_blob(&d2),
        String::new(),
    ];
    let nodes = list_nodes(&blobs);
    assert_eq!(nodes.len(), 2);
    // a descriptor written to storage and re-read through the listing is
    // field-for-field identical
    assert_eq!(nodes[0].domain_name, d1.domain_name);
    assert_eq!(nodes[0].token, d1.token);
    assert_eq!(nodes[0].node_type, d1.node_type);
    assert_eq!(nodes[1].domain_name, d2.domain_name);
    assert_eq!(nodes[1].token, d2.token);
    assert_eq!(nodes[1].node_type, d2.node_type);
}

#[test]
fn stats_blob_round_trip() {
    let st = PerNodeStats { events: 12030, ingestion_bytes: 18446744073709551615, storage_bytes: 0 };
    let blob = to_stats_blob(&st);
    assert_eq!(
        blob,
        "{\"events\":12030,\"ingestion\":18446744073709551615,\"storage\":0}"
    );
    let back = parse_stats_blob(blob.as_str()).expect("canonical blob must parse");
    assert_eq!(back.events, 12030);
    assert_eq!(back.ingestion_bytes, u64::MAX);
    assert_eq!(back.storage_bytes, 0);
}

#[test]
fn stats_blob_rejects_noncanonical_numbers() {
    // leading zero
    assert!(parse_stats_blob("{\"events\":007,\"ingestion\":1,\"storage\":1}").is_none());
    // just past 64 bits
    assert!(parse_stats_blob("{\"events\":18446744073709551616,\"ingestion\":1,\"storage\":1}").is_none());
    // empty run
    assert!(parse_stats_blob("{\"events\":,\"ingestion\":1,\"storage\":1}").is_none());
}

#[test]
fn aggregation_sums_and_formats() {
    let a = PerNodeStats { events: 10, ingestion_bytes: 1024, storage_bytes: 512 };
    let b = PerNodeStats { events: 5, ingestion_bytes: 76, storage_bytes: 8 };
    let blobs = vec![to_stats_blob(&a), "corrupt".to_owned(), to_stats_blob(&b)];
    let record = aggregate_stats(&blobs);
    assert_eq!(record.total_events, 15);
    assert_eq!(record.total_ingestion, "1100 Bytes");
    assert_eq!(record.total_storage, "520 Bytes");
    assert_eq!(record.ingestion_format, "json");
    assert_eq!(record.storage_format, "parquet");
}

#[test]
fn aggregation_is_order_independent() {
    let a = PerNodeStats { events: 7, ingestion_bytes: 70, storage_bytes: 700 };
    let b = PerNodeStats { events: 11, ingestion_bytes: 110, storage_bytes: 1100 };
    let c = PerNodeStats { events: 13, ingestion_bytes: 130, storage_bytes: 1300 };
    let one = vec![to_stats_blob(&a), to_stats_blob(&b), to_stats_blob(&c)];
    let other = vec![to_stats_blob(&c), to_stats_blob(&a), to_stats_blob(&b)];
    let r1 = aggregate_stats(&one);
    let r2 = aggregate_stats(&other);
    assert_eq!(r1.total_events, r2.total_events);
    assert_eq!(r1.total_ingestion, r2.total_ingestion);
    assert_eq!(r1.total_storage, r2.total_storage);
}

#[test]
fn aggregation_saturates_instead_of_wrapping() {
    let a = PerNodeStats { events: u64::MAX, ingestion_bytes: 1, storage_bytes: 1 };
    let b = PerNodeStats { events: 3, ingestion_bytes: 2, storage_bytes: 2 };
    let blobs = vec![to_stats_blob(&a), to_stats_blob(&b)];
    let record = aggregate_stats(&blobs);
    assert_eq!(record.total_events, u64::MAX);
    assert_eq!(record.total_ingestion, "3 Bytes");
}

#[test]
fn empty_listing_aggregates_to_zero() {
    let blobs: Vec<String> = vec![];
    let record = aggregate_stats(&blobs);
    assert_eq!(record.total_events, 0);
    assert_eq!(record.total_ingestion, "0 Bytes");
    assert_eq!(record.total_storage, "0 Bytes");
}

#[test]
fn byte_totals_render_in_decimal() {
    assert_eq!(format_bytes(0), "0 Bytes");
    assert_eq!(format_bytes(10), "10 Bytes");
    assert_eq!(format_bytes(18446744073709551615), "18446744073709551615 Bytes");
}
