use assistant::config::LlamaServerConfig;
use assistant::launch::LaunchError;
use assistant::load::LoadThreshold;
use assistant::pool::ServiceStatus;
use assistant::scheduler::Scheduler;

fn worker(name: &str, config_path: Option<&str>) -> LlamaServerConfig {
    LlamaServerConfig {
        name: name.to_string(),
        chat_model_path: Some(format!("/models/{}.gguf", name)),
        embedding_model_path: None,
        tts_model_path: None,
        config_path: config_path.map(|p| p.to_string()),
    }
}

fn worker_toml(addr: &str) -> Option<String> {
    Some(format!("[server]\nsocket_addr = \"{}\"\n\n[chat]\n", addr))
}

#[test]
fn new_pool_is_empty() {
    let s = Scheduler::new("/var/lib/assistant".to_string(), 4);
    assert_eq!(s.live_count(), 0);
    assert_eq!(s.max_instances(), 4);
    assert!(s.list_instances().is_empty());
    assert!(s.get_instance("nobody").is_none());
    assert!(s.select_running().is_none());
}

#[test]
fn launch_admits_a_running_record() {
    let mut s = Scheduler::new("/var/lib/assistant".to_string(), 2);
    let launch = s
        .start_instance_with_config(
            worker("m", Some("/etc/assistant/workers/m.toml")),
            worker_toml("127.0.0.1:9001"),
            "/srv",
        )
        .unwrap();
    assert_eq!(launch.instance.status, ServiceStatus::Running);
    assert_eq!(launch.instance.server_addr, "127.0.0.1:9001");
    assert_eq!(launch.instance.config.name, "m");
    assert_eq!(launch.instance.id.chars().count(), 36);
    assert_eq!(s.live_count(), 1);
    let found = s.get_instance(&launch.instance.id).unwrap();
    assert_eq!(found.server_addr, "127.0.0.1:9001");
    assert_eq!(found.status, ServiceStatus::Running);
    assert_eq!(s.select_running().unwrap().id, launch.instance.id);
}

#[test]
fn launches_get_different_identifiers() {
    let mut s = Scheduler::new("/d".to_string(), 3);
    let a = s
        .start_instance_with_config(worker("a", Some("/w/a.toml")), worker_toml("h:1"), "/")
        .unwrap();
    let b = s
        .start_instance_with_config(worker("b", Some("/w/b.toml")), worker_toml("h:2"), "/")
        .unwrap();
    assert_ne!(a.instance.id, b.instance.id);
    assert_eq!(s.live_count(), 2);
}

#[test]
fn launch_is_refused_when_the_pool_is_full() {
    let mut s = Scheduler::new("/d".to_string(), 1);
    s.start_instance_with_config(worker("a", Some("/w/a.toml")), worker_toml("h:1"), "/")
        .unwrap();
    let refused =
        s.start_instance_with_config(worker("b", Some("/w/b.toml")), worker_toml("h:2"), "/");
    assert_eq!(refused.err(), Some(LaunchError::CapacityReached));
    assert_eq!(s.live_count(), 1);
}

#[test]
fn zero_capacity_pool_admits_nothing() {
    let mut s = Scheduler::new("/d".to_string(), 0);
    let refused =
        s.start_instance_with_config(worker("a", Some("/w/a.toml")), worker_toml("h:1"), "/");
    assert_eq!(refused.err(), Some(LaunchError::CapacityReached));
    assert_eq!(s.live_count(), 0);
    assert!(s.is_busy(LoadThreshold::zero()));
    assert!(s.is_busy(LoadThreshold::full()));
}

#[test]
fn launch_without_config_path_is_refused() {
    let mut s = Scheduler::new("/d".to_string(), 2);
    let none = s.start_instance_with_config(worker("a", None), worker_toml("h:1"), "/");
    assert_eq!(none.err(), Some(LaunchError::MissingConfigPath));
    let empty = s.start_instance_with_config(worker("a", Some("")), worker_toml("h:1"), "/");
    assert_eq!(empty.err(), Some(LaunchError::MissingConfigPath));
    assert_eq!(s.live_count(), 0);
}

#[test]
fn capacity_is_checked_before_the_declaration() {
    let mut s = Scheduler::new("/d".to_string(), 0);
    let refused = s.start_instance_with_config(worker("a", None), None, "/");
    assert_eq!(refused.err(), Some(LaunchError::CapacityReached));
}

#[test]
fn launch_with_unreadable_worker_config_is_refused() {
    let mut s = Scheduler::new("/d".to_string(), 2);
    let unread = s.start_instance_with_config(worker("a", Some("/w/a.toml")), None, "/");
    assert_eq!(unread.err(), Some(LaunchError::ConfigUnreadable));
    let no_toml = s.start_instance_with_config(
        worker("a", Some("/w/a.toml")),
        Some("this is = = not toml".to_string()),
        "/",
    );
    assert_eq!(no_toml.err(), Some(LaunchError::ConfigUnreadable));
    let no_key = s.start_instance_with_config(
        worker("a", Some("/w/a.toml")),
        Some("[server]\nport = 80\n".to_string()),
        "/",
    );
    assert_eq!(no_key.err(), Some(LaunchError::ConfigUnreadable));
    let not_a_string = s.start_instance_with_config(
        worker("a", Some("/w/a.toml")),
        Some("[server]\nsocket_addr = 8080\n".to_string()),
        "/",
    );
    assert_eq!(not_a_string.err(), Some(LaunchError::ConfigUnreadable));
    assert_eq!(s.live_count(), 0);
}

#[test]
fn other_sections_of_the_worker_config_are_ignored() {
    let mut s = Scheduler::new("/d".to_string(), 2);
    let text = "[chat]\nmodel = \"x\"\n\n[server]\nsocket_addr = \"0.0.0.0:7000\"\nextra = 1\n\n[tts]\nvoice = \"a\"\n";
    let launch = s
        .start_instance_with_config(worker("a", Some("/w/a.toml")), Some(text.to_string()), "/")
        .unwrap();
    assert_eq!(launch.instance.server_addr, "0.0.0.0:7000");
}

#[test]
fn same_address_twice_is_admitted() {
    let mut s = Scheduler::new("/d".to_string(), 2);
    s.start_instance_with_config(worker("a", Some("/w/a.toml")), worker_toml("h:1"), "/")
        .unwrap();
    s.start_instance_with_config(worker("b", Some("/w/b.toml")), worker_toml("h:1"), "/")
        .unwrap();
    assert_eq!(s.live_count(), 2);
}

#[test]
fn capacity_cap_with_three_declarations() {
    let mut s = Scheduler::new("/d".to_string(), 2);
    let configs = vec![
        worker("one", Some("/w/one.toml")),
        worker("two", Some("/w/two.toml")),
        worker("three", Some("/w/three.toml")),
    ];
    let tomls = vec![worker_toml("h:1"), worker_toml("h:2"), worker_toml("h:3")];
    let outcomes = s.load_instances(configs, &tomls, "/");
    assert_eq!(outcomes.len(), 3);
    assert!(outcomes[0].is_ok());
    assert!(outcomes[1].is_ok());
    assert_eq!(outcomes[2].as_ref().err(), Some(&LaunchError::CapacityReached));
    assert_eq!(s.live_count(), 2);
    let names: Vec<String> = s.list_instances().into_iter().map(|i| i.config.name).collect();
    assert_eq!(names, vec!["one".to_string(), "two".to_string()]);
}

#[test]
fn load_skips_a_failing_declaration_and_goes_on() {
    let mut s = Scheduler::new("/d".to_string(), 5);
    let configs = vec![
        worker("one", Some("/w/one.toml")),
        worker("bad", None),
        worker("unread", Some("/w/unread.toml")),
        worker("four", Some("/w/four.toml")),
        worker("short", Some("/w/short.toml")),
    ];
    let tomls = vec![worker_toml("h:1"), worker_toml("h:2"), None, worker_toml("h:4")];
    let outcomes = s.load_instances(configs, &tomls, "/");
    assert_eq!(outcomes.len(), 5);
    assert!(outcomes[0].is_ok());
    assert_eq!(outcomes[1].as_ref().err(), Some(&LaunchError::MissingConfigPath));
    assert_eq!(outcomes[2].as_ref().err(), Some(&LaunchError::ConfigUnreadable));
    assert!(outcomes[3].is_ok());
    assert_eq!(outcomes[4].as_ref().err(), Some(&LaunchError::ConfigUnreadable));
    assert_eq!(s.live_count(), 2);
}

#[test]
fn stop_removes_the_record_and_names_its_scratch_file() {
    let mut s = Scheduler::new("/var/scratch".to_string(), 2);
    let a = s
        .start_instance_with_config(worker("a", Some("/w/a.toml")), worker_toml("h:1"), "/")
        .unwrap();
    let b = s
        .start_instance_with_config(worker("b", Some("/w/b.toml")), worker_toml("h:2"), "/")
        .unwrap();
    let stopped = s.stop_instance(&a.instance.id).unwrap();
    assert_eq!(stopped.instance.id, a.instance.id);
    assert_eq!(stopped.instance.status, ServiceStatus::Stopped);
    assert_eq!(stopped.scratch_dir, "/var/scratch");
    assert_eq!(stopped.scratch_name, format!("{}.toml", a.instance.id));
    assert_eq!(s.live_count(), 1);
    assert!(s.get_instance(&a.instance.id).is_none());
    assert!(s.get_instance(&b.instance.id).is_some());
}

#[test]
fn stop_is_idempotent() {
    let mut s = Scheduler::new("/d".to_string(), 2);
    assert!(s.stop_instance("unknown").is_none());
    let a = s
        .start_instance_with_config(worker("a", Some("/w/a.toml")), worker_toml("h:1"), "/")
        .unwrap();
    assert!(s.stop_instance(&a.instance.id).is_some());
    assert!(s.stop_instance(&a.instance.id).is_none());
    assert_eq!(s.live_count(), 0);
}

#[test]
fn stopping_frees_a_place() {
    let mut s = Scheduler::new("/d".to_string(), 1);
    let a = s
        .start_instance_with_config(worker("a", Some("/w/a.toml")), worker_toml("h:1"), "/")
        .unwrap();
    s.stop_instance(&a.instance.id);
    assert!(s
        .start_instance_with_config(worker("b", Some("/w/b.toml")), worker_toml("h:2"), "/")
        .is_ok());
    assert_eq!(s.live_count(), 1);
}

#[test]
fn exited_record_leaves_the_pool() {
    let mut s = Scheduler::new("/d".to_string(), 2);
    let a = s
        .start_instance_with_config(worker("a", Some("/w/a.toml")), worker_toml("h:1"), "/")
        .unwrap();
    assert_eq!(s.check_load().running, 1);
    let exited = s.mark_exited(&a.instance.id).unwrap();
    assert_eq!(exited.id, a.instance.id);
    assert_eq!(exited.server_addr, "h:1");
    assert_eq!(exited.status, ServiceStatus::Stopped);
    assert_eq!(s.live_count(), 0);
    assert!(s.get_instance(&a.instance.id).is_none());
    assert_eq!(s.check_load().running, 0);
    assert!(s.select_running().is_none());
    assert!(s.mark_exited(&a.instance.id).is_none());
    assert!(s.mark_exited("unknown").is_none());
    assert!(s.stop_instance(&a.instance.id).is_none());
}

#[test]
fn exit_frees_a_place() {
    let mut s = Scheduler::new("/d".to_string(), 1);
    let a = s
        .start_instance_with_config(worker("a", Some("/w/a.toml")), worker_toml("h:1"), "/")
        .unwrap();
    let refused =
        s.start_instance_with_config(worker("b", Some("/w/b.toml")), worker_toml("h:2"), "/");
    assert_eq!(refused.err(), Some(LaunchError::CapacityReached));
    s.mark_exited(&a.instance.id);
    let b = s
        .start_instance_with_config(worker("b", Some("/w/b.toml")), worker_toml("h:2"), "/")
        .unwrap();
    assert_ne!(a.instance.id, b.instance.id);
    assert_eq!(s.live_count(), 1);
}

#[test]
fn every_record_in_the_pool_runs() {
    let mut s = Scheduler::new("/d".to_string(), 3);
    let a = s
        .start_instance_with_config(worker("a", Some("/w/a.toml")), worker_toml("h:1"), "/")
        .unwrap();
    s.start_instance_with_config(worker("b", Some("/w/b.toml")), worker_toml("h:2"), "/")
        .unwrap();
    s.mark_exited(&a.instance.id);
    s.start_instance_with_config(worker("c", Some("/w/c.toml")), worker_toml("h:3"), "/")
        .unwrap();
    let all = s.list_instances();
    assert_eq!(all.len(), 2);
    assert!(all.iter().all(|i| i.status == ServiceStatus::Running));
    assert_eq!(s.check_load().running, s.live_count());
}

#[test]
fn live_count_never_exceeds_the_cap() {
    let mut s = Scheduler::new("/d".to_string(), 3);
    let mut ids: Vec<String> = Vec::new();
    for round in 0..10 {
        let name = format!("w{}", round);
        let path = format!("/w/{}.toml", name);
        if let Ok(l) =
            s.start_instance_with_config(worker(&name, Some(&path)), worker_toml("h:1"), "/")
        {
            ids.push(l.instance.id);
        }
        assert!(s.live_count() <= 3);
        if round % 4 == 3 {
            let id = ids.remove(0);
            s.stop_instance(&id);
            assert!(s.live_count() <= 3);
        }
    }
    assert_eq!(s.live_count(), 3);
}

#[test]
fn server_addr_is_not_changed_after_insertion() {
    let mut s = Scheduler::new("/d".to_string(), 3);
    let a = s
        .start_instance_with_config(worker("a", Some("/w/a.toml")), worker_toml("h:1"), "/")
        .unwrap();
    let b = s
        .start_instance_with_config(worker("b", Some("/w/b.toml")), worker_toml("h:2"), "/")
        .unwrap();
    s.mark_exited(&b.instance.id);
    s.stop_instance(&b.instance.id);
    s.start_instance_with_config(worker("c", Some("/w/c.toml")), worker_toml("h:3"), "/")
        .unwrap();
    assert_eq!(s.get_instance(&a.instance.id).unwrap().server_addr, "h:1");
}

#[test]
fn load_counts_running_records_only() {
    let mut s = Scheduler::new("/d".to_string(), 4);
    let a = s
        .start_instance_with_config(worker("a", Some("/w/a.toml")), worker_toml("h:1"), "/")
        .unwrap();
    s.start_instance_with_config(worker("b", Some("/w/b.toml")), worker_toml("h:2"), "/")
        .unwrap();
    let reading = s.check_load();
    assert_eq!(reading.running, 2);
    assert_eq!(reading.capacity, 4);
    assert!(s.is_busy(LoadThreshold::new(1, 2).unwrap()));
    assert!(!s.is_busy(LoadThreshold::new(3, 4).unwrap()));
    s.mark_exited(&a.instance.id);
    assert!(!s.is_busy(LoadThreshold::new(1, 2).unwrap()));
    assert!(s.is_busy(LoadThreshold::new(1, 4).unwrap()));
}

#[test]
fn busy_at_zero_with_a_running_instance_and_not_at_one_unless_full() {
    let mut s = Scheduler::new("/d".to_string(), 2);
    s.start_instance_with_config(worker("a", Some("/w/a.toml")), worker_toml("h:1"), "/")
        .unwrap();
    assert!(s.is_busy(LoadThreshold::zero()));
    assert!(!s.is_busy(LoadThreshold::full()));
    s.start_instance_with_config(worker("b", Some("/w/b.toml")), worker_toml("h:2"), "/")
        .unwrap();
    assert!(s.is_busy(LoadThreshold::full()));
}

#[test]
fn stop_all_empties_the_pool() {
    let mut s = Scheduler::new("/scratch".to_string(), 3);
    let a = s
        .start_instance_with_config(worker("a", Some("/w/a.toml")), worker_toml("h:1"), "/")
        .unwrap();
    let b = s
        .start_instance_with_config(worker("b", Some("/w/b.toml")), worker_toml("h:2"), "/")
        .unwrap();
    let c = s
        .start_instance_with_config(worker("c", Some("/w/c.toml")), worker_toml("h:3"), "/")
        .unwrap();
    s.mark_exited(&a.instance.id);
    let outcomes = s.stop_all();
    assert_eq!(outcomes.len(), 2);
    assert_eq!(outcomes[0].instance.id, b.instance.id);
    assert_eq!(outcomes[1].instance.id, c.instance.id);
    assert_eq!(outcomes[1].instance.status, ServiceStatus::Stopped);
    assert_eq!(outcomes[1].scratch_name, format!("{}.toml", c.instance.id));
    assert_eq!(outcomes[1].scratch_dir, "/scratch");
    assert_eq!(s.live_count(), 0);
    assert!(s.stop_all().is_empty());
}

#[test]
fn planning_a_launch_changes_nothing() {
    let s = Scheduler::new("/d".to_string(), 1);
    let pending = s
        .prepare_launch(worker("a", Some("/w/a.toml")), worker_toml("h:1"), "/")
        .unwrap();
    assert_eq!(pending.server_addr, "h:1");
    assert_eq!(pending.config.name, "a");
    assert_eq!(pending.id.chars().count(), 36);
    assert_eq!(pending.plan.work_dir, "/w");
    assert_eq!(pending.plan.config_file, "a.toml");
    assert_eq!(s.live_count(), 0);
    let refused = s.prepare_launch(worker("a", None), worker_toml("h:1"), "/");
    assert_eq!(refused.err(), Some(LaunchError::MissingConfigPath));
}

#[test]
fn the_cap_is_decided_at_the_moment_of_insertion() {
    let mut s = Scheduler::new("/d".to_string(), 1);
    let first = s
        .prepare_launch(worker("a", Some("/w/a.toml")), worker_toml("h:1"), "/")
        .unwrap();
    let second = s
        .prepare_launch(worker("b", Some("/w/b.toml")), worker_toml("h:2"), "/")
        .unwrap();
    let second_id = second.id.clone();
    let admitted = s.commit_launch(first).unwrap();
    assert_eq!(admitted.instance.status, ServiceStatus::Running);
    assert_eq!(admitted.plan.config_file, "a.toml");
    let refused = s.commit_launch(second);
    assert_eq!(refused.err(), Some(LaunchError::CapacityReached));
    assert_eq!(s.live_count(), 1);
    assert!(s.get_instance(&second_id).is_none());
}

#[test]
fn an_identifier_that_is_taken_is_made_new() {
    let mut s = Scheduler::new("/d".to_string(), 4);
    let first = s
        .prepare_launch(worker("a", Some("/w/a.toml")), worker_toml("h:1"), "/")
        .unwrap();
    let drawn = first.id.clone();
    let mut second = s
        .prepare_launch(worker("b", Some("/w/b.toml")), worker_toml("h:2"), "/")
        .unwrap();
    second.id = drawn.clone();
    let mut third = s
        .prepare_launch(worker("c", Some("/w/c.toml")), worker_toml("h:3"), "/")
        .unwrap();
    third.id = drawn.clone();
    let a = s.commit_launch(first).unwrap();
    let b = s.commit_launch(second).unwrap();
    let c = s.commit_launch(third).unwrap();
    assert_eq!(a.instance.id, drawn);
    assert_eq!(b.instance.id, format!("{}-", drawn));
    assert_eq!(c.instance.id, format!("{}--", drawn));
    assert_eq!(s.live_count(), 3);
    assert_eq!(s.get_instance(&a.instance.id).unwrap().server_addr, "h:1");
    assert_eq!(s.get_instance(&b.instance.id).unwrap().server_addr, "h:2");
    assert_eq!(s.get_instance(&c.instance.id).unwrap().server_addr, "h:3");
    let names: Vec<String> = s.list_instances().into_iter().map(|i| i.config.name).collect();
    assert_eq!(names, vec!["a".to_string(), "b".to_string(), "c".to_string()]);
}

#[test]
fn a_launched_identifier_is_new_to_the_pool() {
    let mut s = Scheduler::new("/d".to_string(), 8);
    for round in 0..8 {
        let before: Vec<String> = s.list_instances().into_iter().map(|i| i.id).collect();
        let name = format!("w{}", round);
        let path = format!("/w/{}.toml", name);
        let launch = s
            .start_instance_with_config(worker(&name, Some(&path)), worker_toml("h:1"), "/")
            .unwrap();
        assert!(!before.contains(&launch.instance.id));
        let found = s.get_instance(&launch.instance.id).unwrap();
        assert_eq!(found.status, ServiceStatus::Running);
        assert_eq!(found.config.name, name);
        assert_eq!(s.list_instances().last().unwrap().id, launch.instance.id);
    }
}
