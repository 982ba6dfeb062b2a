//! Names of partitions and of their files.
use infrastore::filename::{folded, same_folded, sanitize};
use infrastore::files::{
    check_destination, names_parquet, one_file, partitions, stem_of, strip_suffix, Entry, Found,
    PartitionFiles,
};
use infrastore::kinds::{Dtype, ElementType, TimeReference, TimeSeriesType};
use infrastore::partition::{
    disambiguate, reference_slug, series_name, values_name, PartitionKey, ValueKind,
};

fn entry(name: &str) -> Entry {
    Entry { name: name.to_string(), path: format!("out/{name}") }
}

fn scalar(reference: Option<TimeReference>) -> PartitionKey {
    PartitionKey {
        time_series_type: TimeSeriesType::SingleTimeSeries,
        value_kind: ValueKind::Dense { dtype: Dtype::F64, shape: vec![] },
        time_reference: reference,
    }
}

#[test]
fn sanitize_keeps_what_is_legal() {
    assert_eq!(sanitize("SingleTimeSeries"), "SingleTimeSeries");
    assert_eq!(sanitize("f64_2x3"), "f64_2x3");
}

#[test]
fn sanitize_flattens_what_is_not() {
    let name = sanitize("America/Denver");
    assert!(!name.contains('/'));
    assert_ne!(name, "America/Denver");
    assert_ne!(sanitize("con"), "con");
    assert_ne!(sanitize("COM1"), "COM1");
    assert!(!sanitize("").is_empty());
}

#[test]
fn a_device_name_is_one_whatever_the_extension() {
    assert_eq!(sanitize("con.x"), "x_con.x");
    assert_eq!(sanitize("Lpt9.a.b"), "x_Lpt9.a.b");
    assert_eq!(sanitize(".nul."), "x_nul");
    assert_eq!(sanitize("console.x"), "console.x");
    assert_eq!(sanitize("x.con"), "x.con", "only the part before the first dot counts");
    assert_eq!(sanitize("com0"), "com0");
}

#[test]
fn folding_is_ascii_only() {
    assert_eq!(folded("AbC"), "abc");
    assert!(same_folded("UTC", "utc"));
    assert!(!same_folded("UTC", "UTX"));
}

#[test]
fn a_partition_is_named_after_its_key() {
    let key = scalar(Some(TimeReference::Utc));
    assert_eq!(key.file_name(), "SingleTimeSeries.f64.utc.parquet");
    assert_eq!(reference_slug(&None), "unspecified");
    assert_eq!(reference_slug(&Some(TimeReference::Zoneless)), "zoneless");
    let tuple = ValueKind::Tuple { arity: 3, dtype: Dtype::F64 };
    assert_eq!(tuple.slug(), "tuple3_f64");
    let dense = ValueKind::of(&ElementType::Scalar(Dtype::I32), &vec![2, 3]);
    assert_eq!(dense.slug(), "i32_2x3");
}

#[test]
fn names_of_different_partitions_differ() {
    let keys = vec![
        scalar(Some(TimeReference::Zone("a/b".to_string()))),
        scalar(Some(TimeReference::Zone("a:b".to_string()))),
        scalar(None),
        scalar(None),
    ];
    let named = disambiguate(&keys);
    assert_eq!(named.len(), 3);
    for i in 0..named.len() {
        for j in 0..i {
            assert_ne!(named[i].name.to_lowercase(), named[j].name.to_lowercase());
        }
    }
}

#[test]
fn the_two_halves_share_a_stem() {
    assert_eq!(values_name("a.b"), "a.b.values.parquet");
    assert_eq!(series_name("a.b"), "a.b.series.parquet");
    assert_eq!(stem_of("a.b.values.parquet"), Some("a.b".to_string()));
    assert_eq!(stem_of("a.b.series.parquet"), None);
    assert_eq!(strip_suffix("x.parquet", ".parquet"), Some("x".to_string()));
    assert_eq!(strip_suffix("x", ".parquet"), None);
}

#[test]
fn the_extension_counts_in_any_case_but_not_alone() {
    assert!(names_parquet("a.parquet"));
    assert!(names_parquet("a.b.PARQUET"));
    assert!(!names_parquet(".parquet"));
    assert!(!names_parquet("parquet"));
    assert!(!names_parquet("a.parquet.txt"));
}

#[test]
fn a_destination_with_parquet_files_is_refused() {
    assert!(check_destination("out", &vec![]).is_ok());
    assert!(check_destination("out", &vec!["notes.txt".to_string()]).is_ok());
    let names: Vec<String> =
        ["a.parquet", "b.txt", "c.Parquet", "d.parquet", "e.parquet"].map(String::from).to_vec();
    assert_eq!(
        check_destination("out", &names),
        Err(
            "out already holds 4 .parquet file(s) (a.parquet, c.Parquet, d.parquet); export into \
             an empty directory, since `add --parquet <dir>` imports every partition it finds"
                .to_string()
        )
    );
}

#[test]
fn a_label_is_the_stem_or_the_lone_file() {
    let pair = PartitionFiles {
        stem: "s".to_string(),
        values: "d/s.values.parquet".to_string(),
        series: Some("d/s.series.parquet".to_string()),
    };
    assert_eq!(pair.label(), "s");
    let foreign = PartitionFiles { series: None, ..pair };
    assert_eq!(foreign.label(), "d/s.values.parquet");
}

#[test]
fn a_directory_lists_its_partitions_by_name() {
    let files = vec![
        entry("z.parquet"),
        entry("b.series.parquet"),
        entry("b.values.parquet"),
        entry("readme.md"),
        entry("a.values.parquet"),
    ];
    let found = partitions("out", &Found::Directory { files }).unwrap();
    let stems: Vec<String> = found.iter().map(|p| p.stem.clone()).collect();
    assert_eq!(stems, vec!["a", "b", "z.parquet"]);
    assert_eq!(found[0].series, None);
    assert_eq!(found[1].series, Some("out/b.series.parquet".to_string()));
    assert_eq!(found[1].values, "out/b.values.parquet");
    assert_eq!(found[2].label(), "out/z.parquet");
}

#[test]
fn a_series_half_alone_is_a_truncated_export() {
    let files = vec![entry("b.series.parquet")];
    assert_eq!(
        partitions("out", &Found::Directory { files }),
        Err(
            "b.series.parquet has no b.values.parquet beside it: its rows name arrays that are \
             not there"
                .to_string()
        )
    );
    assert!(one_file("b.series.parquet", "out/b.series.parquet", &vec![]).is_err());
}

#[test]
fn a_path_may_be_a_stem_or_a_file_or_nothing() {
    let beside = || vec![entry("b.series.parquet"), entry("b.values.parquet")];
    let stem = partitions("out/b", &Found::Nothing { name: Some("b".to_string()), beside: beside() });
    assert_eq!(stem.unwrap()[0].series, Some("out/b.series.parquet".to_string()));
    let half = partitions(
        "out/b.series.parquet",
        &Found::File {
            name: Some("b.series.parquet".to_string()),
            path: "out/b.series.parquet".to_string(),
            beside: beside(),
        },
    );
    assert_eq!(half.unwrap()[0].values, "out/b.values.parquet");
    let neither = "x is neither a Parquet file, a partition stem, nor a directory of them";
    assert_eq!(partitions("x", &Found::Other), Err(neither.to_string()));
    assert_eq!(
        partitions("x", &Found::Nothing { name: Some("x".to_string()), beside: vec![] }),
        Err(neither.to_string())
    );
    assert_eq!(
        partitions("x", &Found::File { name: None, path: "x".to_string(), beside: vec![] }),
        Err("x has no file name".to_string())
    );
    assert_eq!(
        partitions("x", &Found::Directory { files: vec![entry("a.txt")] }),
        Err("x holds no .parquet files".to_string())
    );
}
