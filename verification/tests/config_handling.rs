use transit_model::model::Contributor;
use transit_model::read_utils::Config;
use transit_model::read_utils::ConfigDataset;
use transit_model::read_utils::PathFileHandler;
use transit_model::read_utils::read_config;

#[test]
fn config_absent_yields_defaults() {
    let (contributor, dataset, feed_infos) = read_config(None);
    assert_eq!(contributor.id, "");
    assert_eq!(contributor.name, "");
    assert_eq!(dataset.id, "");
    assert_eq!(dataset.contributor_id, "");
    assert!(feed_infos.is_empty());
}

#[test]
fn config_seeds_contributor_and_dataset() {
    let config = Config {
        contributor: Contributor {
            id: String::from("contributor_id"),
            name: String::from("Contributor Name"),
        },
        dataset: ConfigDataset { dataset_id: String::from("dataset-id") },
        feed_infos: Some(vec![(
            String::from("feed_publisher_name"),
            String::from("The Great Data Publisher"),
        )]),
    };
    let (contributor, dataset, feed_infos) = read_config(Some(config));
    assert_eq!(contributor.id, "contributor_id");
    assert_eq!(contributor.name, "Contributor Name");
    assert_eq!(dataset.id, "dataset-id");
    assert_eq!(dataset.contributor_id, "contributor_id");
    assert_eq!(feed_infos.len(), 1);
    assert_eq!(feed_infos[0].0, "feed_publisher_name");
    assert_eq!(feed_infos[0].1, "The Great Data Publisher");
}

#[test]
fn config_without_feed_infos() {
    let config = Config {
        contributor: Contributor { id: String::from("c1"), name: String::new() },
        dataset: ConfigDataset { dataset_id: String::from("d1") },
        feed_infos: None,
    };
    let (_, _, feed_infos) = read_config(Some(config));
    assert!(feed_infos.is_empty());
}

#[test]
fn path_file_handler_paths() {
    let handler = PathFileHandler::new(String::from("tests/fixtures/file-handler"));
    assert_eq!(handler.source_name(), "tests/fixtures/file-handler");
    assert_eq!(handler.full_path("hello.txt"), "tests/fixtures/file-handler/hello.txt");
    assert_eq!(handler.full_path("folder/world.txt"), "tests/fixtures/file-handler/folder/world.txt");
}
