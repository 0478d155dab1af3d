use enteract::data::health::{
    assess_health, get_database_schema, required_indexes, required_tables, startup_begin, startup_step,
    ConnectionProbes, DirectoryProbe, HealthProbes, LookupOutcome, PathProbes, StartupAction, StartupEvent,
    StartupPhase, StartupReport,
};

fn all_found(names: Vec<String>) -> Vec<(String, LookupOutcome)> {
    names.into_iter().map(|n| (n, LookupOutcome::Found)).collect()
}

fn good_connection() -> ConnectionProbes {
    ConnectionProbes {
        read: Ok(()),
        write: Ok(()),
        foreign_keys: Ok(1),
        journal_mode: Ok("WAL".to_string()),
        tables: all_found(required_tables()),
        indexes: all_found(required_indexes()),
    }
}

fn probes(located: Result<PathProbes, String>) -> HealthProbes {
    HealthProbes { located, last_check: 1700000000, check_duration_ms: 12 }
}

#[test]
fn healthy_database() {
    let h = assess_health(probes(Ok(PathProbes {
        path_accessible: true,
        directory: DirectoryProbe::Writable,
        connection: Ok(good_connection()),
    })));
    assert!(h.is_healthy);
    assert!(h.can_connect && h.can_read && h.can_write);
    assert!(h.foreign_keys_enabled && h.wal_mode && h.tables_exist && h.indexes_exist);
    assert!(h.errors.is_empty());
    assert!(h.warnings.is_empty());
    assert_eq!(h.last_check, 1700000000);
    assert_eq!(h.check_duration_ms, 12);
}

#[test]
fn unknown_path_is_unhealthy() {
    let h = assess_health(probes(Err("no app dir".to_string())));
    assert!(!h.is_healthy && !h.can_connect && !h.path_accessible);
    assert_eq!(h.errors, vec!["Failed to get database path: no app dir".to_string()]);
    assert!(h.warnings.is_empty());
}

#[test]
fn connection_failure_stops_the_check() {
    let h = assess_health(probes(Ok(PathProbes {
        path_accessible: false,
        directory: DirectoryProbe::NotWritable("denied".to_string()),
        connection: Err("locked".to_string()),
    })));
    assert!(!h.is_healthy && !h.can_connect);
    assert!(!h.directory_writable);
    assert_eq!(
        h.errors,
        vec!["Directory not writable: denied".to_string(), "Cannot connect to database: locked".to_string()]
    );
    assert_eq!(h.warnings, vec!["Database file does not exist".to_string()]);
}

#[test]
fn missing_tables_and_settings_are_reported() {
    let mut c = good_connection();
    c.foreign_keys = Ok(0);
    c.journal_mode = Ok("delete".to_string());
    c.tables[0].1 = LookupOutcome::Missing;
    c.tables[2].1 = LookupOutcome::Missing;
    c.tables[3].1 = LookupOutcome::Failed("boom".to_string());
    c.indexes[1].1 = LookupOutcome::Missing;
    c.write = Err("readonly".to_string());
    let h = assess_health(probes(Ok(PathProbes {
        path_accessible: true,
        directory: DirectoryProbe::Created,
        connection: Ok(c),
    })));
    assert!(!h.is_healthy);
    assert!(h.can_read && !h.can_write && !h.tables_exist && !h.indexes_exist);
    assert!(!h.foreign_keys_enabled && !h.wal_mode);
    assert_eq!(
        h.errors,
        vec![
            "Cannot write to database: readonly".to_string(),
            "Error checking table thinking_processes: boom".to_string(),
        ]
    );
    assert_eq!(
        h.warnings,
        vec![
            "Missing tables: chat_sessions, message_attachments".to_string(),
            "Missing indexes: idx_chat_messages_session_timestamp".to_string(),
            "Foreign keys are not enabled".to_string(),
            "Database is not using WAL mode".to_string(),
        ]
    );
}

#[test]
fn schema_mentions_every_required_table_and_index() {
    let schema = get_database_schema();
    for t in required_tables() {
        assert!(schema.contains(&format!("CREATE TABLE IF NOT EXISTS {}", t)));
    }
    for i in required_indexes() {
        assert!(schema.contains(&format!("CREATE INDEX IF NOT EXISTS {}", i)));
    }
    assert_eq!(required_tables().len(), 9);
    assert_eq!(required_indexes().len(), 4);
}

#[test]
fn startup_initializes_once_when_unhealthy() {
    let (p, a) = startup_begin();
    assert_eq!((p, a), (StartupPhase::FirstCheck, StartupAction::CheckHealth));
    assert_eq!(
        startup_step(p, StartupEvent::Health(true)),
        (StartupPhase::Finished, Some(StartupAction::Stop(StartupReport::AlreadyHealthy)))
    );
    let (p, a) = startup_step(p, StartupEvent::Health(false));
    assert_eq!((p, a), (StartupPhase::Initializing, Some(StartupAction::InitializeDatabase)));
    assert_eq!(
        startup_step(p, StartupEvent::Initialized(false)),
        (StartupPhase::Finished, Some(StartupAction::Stop(StartupReport::InitializationFailed)))
    );
    let (p, a) = startup_step(p, StartupEvent::Initialized(true));
    assert_eq!((p, a), (StartupPhase::Rechecking, Some(StartupAction::CheckHealth)));
    assert_eq!(
        startup_step(p, StartupEvent::Health(false)),
        (StartupPhase::Finished, Some(StartupAction::Stop(StartupReport::StillUnhealthy)))
    );
    let (p, a) = startup_step(p, StartupEvent::Health(true));
    assert_eq!((p, a), (StartupPhase::Finished, Some(StartupAction::Stop(StartupReport::Repaired))));
    assert_eq!(startup_step(p, StartupEvent::Health(false)), (StartupPhase::Finished, None));
}
