use pure::docker::docker_cleanup_args;
use pure::docker::docker_cleanup_status;
use pure::docker::docker_reclaimable_total;
use pure::docker::docker_scan_items;
use pure::docker::list_targets_docker;
use pure::docker::DockerCleanupStatus;
use pure::model::Category;
use pure::model::ItemKind;

#[test]
fn reclaimable_totals_sum_parsed_lines() {
    let lines = vec![
        "{\"Type\":\"Images\",\"Reclaimable\":\"2KB (50%)\"}".to_string(),
        "{\"Type\":\"Containers\",\"Reclaimable\":\"500B (10%)\"}".to_string(),
        "not json at all".to_string(),
        "{\"Type\":\"Volumes\",\"Size\":\"1GB\"}".to_string(),
    ];
    assert_eq!(docker_reclaimable_total(&lines), 2500);
}

#[test]
fn unparseable_output_counts_nothing() {
    let lines = vec!["".to_string(), "{}".to_string(), "{\"Reclaimable\": 3}".to_string()];
    assert_eq!(docker_reclaimable_total(&lines), 0);
}

#[test]
fn docker_scan_reports_one_aggregate_item() {
    let lines = vec!["{\"Reclaimable\":\"1500B\"}".to_string()];
    let items = docker_scan_items(true, &lines);
    assert_eq!(items.len(), 1);
    assert_eq!(items[0].category, Category::Docker);
    assert_eq!(items[0].path, "docker:prune");
    assert_eq!(items[0].size, Some(1500));
    assert_eq!(items[0].kind, ItemKind::Directory);
}

#[test]
fn docker_scan_is_silent_when_unavailable_or_empty() {
    let lines = vec!["{\"Reclaimable\":\"1500B\"}".to_string()];
    assert!(docker_scan_items(false, &lines).is_empty());
    assert!(docker_scan_items(true, &vec![]).is_empty());
    let zero = vec!["{\"Reclaimable\":\"0B\"}".to_string()];
    assert!(docker_scan_items(true, &zero).is_empty());
}

#[test]
fn cleanup_commands_and_policy() {
    assert!(docker_cleanup_args(false).is_none());
    let args = docker_cleanup_args(true).expect("available tool has a command");
    assert_eq!(args, vec!["system", "prune", "-a", "-f", "--volumes"]);

    assert_eq!(docker_cleanup_status(false, false), DockerCleanupStatus::SkippedUnavailable);
    assert_eq!(docker_cleanup_status(false, true), DockerCleanupStatus::SkippedUnavailable);
    assert_eq!(docker_cleanup_status(true, true), DockerCleanupStatus::Completed);
    assert_eq!(docker_cleanup_status(true, false), DockerCleanupStatus::Failed);
}

#[test]
fn docker_targets_list() {
    assert!(list_targets_docker(false).is_empty());
    let labels = list_targets_docker(true);
    assert_eq!(
        labels,
        vec![
            "Unused images".to_string(),
            "Stopped containers".to_string(),
            "Unused volumes".to_string(),
            "Unused networks".to_string(),
            "Build cache".to_string(),
        ]
    );
}
